//! The arguments of procedures.
use crate::error::Error;
use crate::pack::Pack;
use vstd::prelude::*;

verus! {

/// The serialisations of several values, one after the other.
pub open spec fn packed_all<T: Pack>(values: Seq<T>) -> Seq<u8>
    decreases values.len(),
{
    if values.len() == 0 {
        Seq::empty()
    } else {
        packed_all(values.drop_last()) + values.last().packed()
    }
}

/// Whether serialising any of several values may fail.
pub open spec fn any_fallible<T: Pack>(values: Seq<T>) -> bool {
    exists|i: int| 0 <= i < values.len() && #[trigger] values[i].fallible()
}

/// Serialises a value behind what has already been serialised.
fn append_packed<T: Pack>(data: &mut Vec<u8>, value: &T) -> (result: Result<(), Error>)
    ensures
        match result {
            Ok(_) => final(data)@ == old(data)@ + value.packed(),
            Err(error) => error == Error::Encode && value.fallible(),
        },
{
    match value.pack() {
        Ok(bytes) => {
            let mut bytes = bytes;
            data.append(&mut bytes);
            Ok(())
        },
        Err(error) => Err(error),
    }
}

/// Serialises several values, one after the other.
fn pack_all<T: Pack>(values: &[T]) -> (result: Result<Vec<u8>, Error>)
    ensures
        match result {
            Ok(bytes) => bytes@ == packed_all(values@),
            Err(error) => error == Error::Encode && any_fallible(values@),
        },
{
    let mut data: Vec<u8> = Vec::new();
    let mut done: usize = 0;
    while done < values.len()
        invariant
            done <= values@.len(),
            data@ == packed_all(values@.take(done as int)),
        decreases values@.len() - done,
    {
        match append_packed(&mut data, &values[done]) {
            Ok(_) => {},
            Err(error) => {
                assert(values@[done as int].fallible());
                return Err(error);
            },
        }
        done = done + 1;
        assert(values@.take(done as int).drop_last() =~= values@.take(done - 1));
    }
    assert(values@.take(done as int) =~= values@);
    Ok(data)
}

/// The arguments to a remote procedure. Arguments can be given as any kind of list: a vector, an
/// array, or a tuple.
pub trait ProcedureArgs: Sized {
    /// The arguments as a flattened byte sequence.
    spec fn flattened(self) -> Seq<u8>;

    /// Whether flattening the arguments needs a serialiser, which may fail.
    spec fn fallible(self) -> bool;

    /// Transforms the arguments into a flattened byte array, ready for transmission. At the other
    /// end, this should be able to be deserialized as a tuple, once a MessagePack length prefix is
    /// prepended.
    fn into_bytes(self) -> (result: Result<Vec<u8>, Error>)
        ensures
            match result {
                Ok(bytes) => bytes@ == self.flattened(),
                Err(error) => error == Error::Encode && self.fallible(),
            },
    ;
}

impl<T: Pack> ProcedureArgs for Vec<T> {
    open spec fn flattened(self) -> Seq<u8> {
        packed_all(self@)
    }

    open spec fn fallible(self) -> bool {
        any_fallible(self@)
    }

    fn into_bytes(self) -> (result: Result<Vec<u8>, Error>) {
        pack_all(self.as_slice())
    }
}

impl<T: Pack, const N: usize> ProcedureArgs for [T; N] {
    open spec fn flattened(self) -> Seq<u8> {
        packed_all(self@)
    }

    open spec fn fallible(self) -> bool {
        any_fallible(self@)
    }

    fn into_bytes(self) -> (result: Result<Vec<u8>, Error>) {
        pack_all(self.as_slice())
    }
}

impl ProcedureArgs for () {
    open spec fn flattened(self) -> Seq<u8> {
        Seq::empty()
    }

    open spec fn fallible(self) -> bool {
        false
    }

    fn into_bytes(self) -> (result: Result<Vec<u8>, Error>) {
        Ok(Vec::new())
    }
}

impl<A: Pack> ProcedureArgs for (A,) {
    open spec fn flattened(self) -> Seq<u8> {
        self.0.packed()
    }

    open spec fn fallible(self) -> bool {
        self.0.fallible()
    }

    fn into_bytes(self) -> (result: Result<Vec<u8>, Error>) {
        let mut data: Vec<u8> = Vec::new();
        append_packed(&mut data, &self.0)?;
        assert(data@ =~= self.flattened());
        Ok(data)
    }
}

impl<A: Pack, B: Pack> ProcedureArgs for (A, B) {
    open spec fn flattened(self) -> Seq<u8> {
        self.0.packed() + self.1.packed()
    }

    open spec fn fallible(self) -> bool {
        self.0.fallible() || self.1.fallible()
    }

    fn into_bytes(self) -> (result: Result<Vec<u8>, Error>) {
        let mut data: Vec<u8> = Vec::new();
        append_packed(&mut data, &self.0)?;
        append_packed(&mut data, &self.1)?;
        assert(data@ =~= self.flattened());
        Ok(data)
    }
}

impl<A: Pack, B: Pack, C: Pack> ProcedureArgs for (A, B, C) {
    open spec fn flattened(self) -> Seq<u8> {
        self.0.packed() + self.1.packed() + self.2.packed()
    }

    open spec fn fallible(self) -> bool {
        self.0.fallible() || self.1.fallible() || self.2.fallible()
    }

    fn into_bytes(self) -> (result: Result<Vec<u8>, Error>) {
        let mut data: Vec<u8> = Vec::new();
        append_packed(&mut data, &self.0)?;
        append_packed(&mut data, &self.1)?;
        append_packed(&mut data, &self.2)?;
        assert(data@ =~= self.flattened());
        Ok(data)
    }
}

impl<A: Pack, B: Pack, C: Pack, D: Pack> ProcedureArgs for (A, B, C, D) {
    open spec fn flattened(self) -> Seq<u8> {
        self.0.packed() + self.1.packed() + self.2.packed() + self.3.packed()
    }

    open spec fn fallible(self) -> bool {
        self.0.fallible() || self.1.fallible() || self.2.fallible() || self.3.fallible()
    }

    fn into_bytes(self) -> (result: Result<Vec<u8>, Error>) {
        let mut data: Vec<u8> = Vec::new();
        append_packed(&mut data, &self.0)?;
        append_packed(&mut data, &self.1)?;
        append_packed(&mut data, &self.2)?;
        append_packed(&mut data, &self.3)?;
        assert(data@ =~= self.flattened());
        Ok(data)
    }
}

impl<A: Pack, B: Pack, C: Pack, D: Pack, E: Pack> ProcedureArgs for (A, B, C, D, E) {
    open spec fn flattened(self) -> Seq<u8> {
        self.0.packed() + self.1.packed() + self.2.packed() + self.3.packed() + self.4.packed()
    }

    open spec fn fallible(self) -> bool {
        self.0.fallible() || self.1.fallible() || self.2.fallible() || self.3.fallible()
            || self.4.fallible()
    }

    fn into_bytes(self) -> (result: Result<Vec<u8>, Error>) {
        let mut data: Vec<u8> = Vec::new();
        append_packed(&mut data, &self.0)?;
        append_packed(&mut data, &self.1)?;
        append_packed(&mut data, &self.2)?;
        append_packed(&mut data, &self.3)?;
        append_packed(&mut data, &self.4)?;
        assert(data@ =~= self.flattened());
        Ok(data)
    }
}

impl<A: Pack, B: Pack, C: Pack, D: Pack, E: Pack, F: Pack> ProcedureArgs for (A, B, C, D, E, F) {
    open spec fn flattened(self) -> Seq<u8> {
        self.0.packed() + self.1.packed() + self.2.packed() + self.3.packed() + self.4.packed()
            + self.5.packed()
    }

    open spec fn fallible(self) -> bool {
        self.0.fallible() || self.1.fallible() || self.2.fallible() || self.3.fallible()
            || self.4.fallible() || self.5.fallible()
    }

    fn into_bytes(self) -> (result: Result<Vec<u8>, Error>) {
        let mut data: Vec<u8> = Vec::new();
        append_packed(&mut data, &self.0)?;
        append_packed(&mut data, &self.1)?;
        append_packed(&mut data, &self.2)?;
        append_packed(&mut data, &self.3)?;
        append_packed(&mut data, &self.4)?;
        append_packed(&mut data, &self.5)?;
        assert(data@ =~= self.flattened());
        Ok(data)
    }
}

impl<A: Pack, B: Pack, C: Pack, D: Pack, E: Pack, F: Pack, G: Pack> ProcedureArgs for (
    A, B, C, D, E, F, G,
) {
    open spec fn flattened(self) -> Seq<u8> {
        self.0.packed() + self.1.packed() + self.2.packed() + self.3.packed() + self.4.packed()
            + self.5.packed() + self.6.packed()
    }

    open spec fn fallible(self) -> bool {
        self.0.fallible() || self.1.fallible() || self.2.fallible() || self.3.fallible()
            || self.4.fallible() || self.5.fallible() || self.6.fallible()
    }

    fn into_bytes(self) -> (result: Result<Vec<u8>, Error>) {
        let mut data: Vec<u8> = Vec::new();
        append_packed(&mut data, &self.0)?;
        append_packed(&mut data, &self.1)?;
        append_packed(&mut data, &self.2)?;
        append_packed(&mut data, &self.3)?;
        append_packed(&mut data, &self.4)?;
        append_packed(&mut data, &self.5)?;
        append_packed(&mut data, &self.6)?;
        assert(data@ =~= self.flattened());
        Ok(data)
    }
}

impl<A: Pack, B: Pack, C: Pack, D: Pack, E: Pack, F: Pack, G: Pack, H: Pack> ProcedureArgs for (
    A, B, C, D, E, F, G, H,
) {
    open spec fn flattened(self) -> Seq<u8> {
        self.0.packed() + self.1.packed() + self.2.packed() + self.3.packed() + self.4.packed()
            + self.5.packed() + self.6.packed() + self.7.packed()
    }

    open spec fn fallible(self) -> bool {
        self.0.fallible() || self.1.fallible() || self.2.fallible() || self.3.fallible()
            || self.4.fallible() || self.5.fallible() || self.6.fallible() || self.7.fallible()
    }

    fn into_bytes(self) -> (result: Result<Vec<u8>, Error>) {
        let mut data: Vec<u8> = Vec::new();
        append_packed(&mut data, &self.0)?;
        append_packed(&mut data, &self.1)?;
        append_packed(&mut data, &self.2)?;
        append_packed(&mut data, &self.3)?;
        append_packed(&mut data, &self.4)?;
        append_packed(&mut data, &self.5)?;
        append_packed(&mut data, &self.6)?;
        append_packed(&mut data, &self.7)?;
        assert(data@ =~= self.flattened());
        Ok(data)
    }
}

impl<
    A: Pack, B: Pack, C: Pack, D: Pack, E: Pack, F: Pack, G: Pack, H: Pack, J: Pack,
> ProcedureArgs for (
    A, B, C, D, E, F, G, H, J,
) {
    open spec fn flattened(self) -> Seq<u8> {
        self.0.packed() + self.1.packed() + self.2.packed() + self.3.packed() + self.4.packed()
            + self.5.packed() + self.6.packed() + self.7.packed() + self.8.packed()
    }

    open spec fn fallible(self) -> bool {
        self.0.fallible() || self.1.fallible() || self.2.fallible() || self.3.fallible()
            || self.4.fallible() || self.5.fallible() || self.6.fallible() || self.7.fallible()
            || self.8.fallible()
    }

    fn into_bytes(self) -> (result: Result<Vec<u8>, Error>) {
        let mut data: Vec<u8> = Vec::new();
        append_packed(&mut data, &self.0)?;
        append_packed(&mut data, &self.1)?;
        append_packed(&mut data, &self.2)?;
        append_packed(&mut data, &self.3)?;
        append_packed(&mut data, &self.4)?;
        append_packed(&mut data, &self.5)?;
        append_packed(&mut data, &self.6)?;
        append_packed(&mut data, &self.7)?;
        append_packed(&mut data, &self.8)?;
        assert(data@ =~= self.flattened());
        Ok(data)
    }
}

impl<
    A: Pack, B: Pack, C: Pack, D: Pack, E: Pack, F: Pack, G: Pack, H: Pack, J: Pack, K: Pack,
> ProcedureArgs for (
    A, B, C, D, E, F, G, H, J, K,
) {
    open spec fn flattened(self) -> Seq<u8> {
        self.0.packed() + self.1.packed() + self.2.packed() + self.3.packed() + self.4.packed()
            + self.5.packed() + self.6.packed() + self.7.packed() + self.8.packed()
            + self.9.packed()
    }

    open spec fn fallible(self) -> bool {
        self.0.fallible() || self.1.fallible() || self.2.fallible() || self.3.fallible()
            || self.4.fallible() || self.5.fallible() || self.6.fallible() || self.7.fallible()
            || self.8.fallible() || self.9.fallible()
    }

    fn into_bytes(self) -> (result: Result<Vec<u8>, Error>) {
        let mut data: Vec<u8> = Vec::new();
        append_packed(&mut data, &self.0)?;
        append_packed(&mut data, &self.1)?;
        append_packed(&mut data, &self.2)?;
        append_packed(&mut data, &self.3)?;
        append_packed(&mut data, &self.4)?;
        append_packed(&mut data, &self.5)?;
        append_packed(&mut data, &self.6)?;
        append_packed(&mut data, &self.7)?;
        append_packed(&mut data, &self.8)?;
        append_packed(&mut data, &self.9)?;
        assert(data@ =~= self.flattened());
        Ok(data)
    }
}

impl<
    A: Pack, B: Pack, C: Pack, D: Pack, E: Pack, F: Pack, G: Pack, H: Pack, J: Pack, K: Pack,
    L: Pack,
> ProcedureArgs for (
    A, B, C, D, E, F, G, H, J, K, L,
) {
    open spec fn flattened(self) -> Seq<u8> {
        self.0.packed() + self.1.packed() + self.2.packed() + self.3.packed() + self.4.packed()
            + self.5.packed() + self.6.packed() + self.7.packed() + self.8.packed()
            + self.9.packed() + self.10.packed()
    }

    open spec fn fallible(self) -> bool {
        self.0.fallible() || self.1.fallible() || self.2.fallible() || self.3.fallible()
            || self.4.fallible() || self.5.fallible() || self.6.fallible() || self.7.fallible()
            || self.8.fallible() || self.9.fallible() || self.10.fallible()
    }

    fn into_bytes(self) -> (result: Result<Vec<u8>, Error>) {
        let mut data: Vec<u8> = Vec::new();
        append_packed(&mut data, &self.0)?;
        append_packed(&mut data, &self.1)?;
        append_packed(&mut data, &self.2)?;
        append_packed(&mut data, &self.3)?;
        append_packed(&mut data, &self.4)?;
        append_packed(&mut data, &self.5)?;
        append_packed(&mut data, &self.6)?;
        append_packed(&mut data, &self.7)?;
        append_packed(&mut data, &self.8)?;
        append_packed(&mut data, &self.9)?;
        append_packed(&mut data, &self.10)?;
        assert(data@ =~= self.flattened());
        Ok(data)
    }
}

impl<
    A: Pack, B: Pack, C: Pack, D: Pack, E: Pack, F: Pack, G: Pack, H: Pack, J: Pack, K: Pack,
    L: Pack, M: Pack,
> ProcedureArgs for (
    A, B, C, D, E, F, G, H, J, K, L, M,
) {
    open spec fn flattened(self) -> Seq<u8> {
        self.0.packed() + self.1.packed() + self.2.packed() + self.3.packed() + self.4.packed()
            + self.5.packed() + self.6.packed() + self.7.packed() + self.8.packed()
            + self.9.packed() + self.10.packed() + self.11.packed()
    }

    open spec fn fallible(self) -> bool {
        self.0.fallible() || self.1.fallible() || self.2.fallible() || self.3.fallible()
            || self.4.fallible() || self.5.fallible() || self.6.fallible() || self.7.fallible()
            || self.8.fallible() || self.9.fallible() || self.10.fallible() || self.11.fallible()
    }

    fn into_bytes(self) -> (result: Result<Vec<u8>, Error>) {
        let mut data: Vec<u8> = Vec::new();
        append_packed(&mut data, &self.0)?;
        append_packed(&mut data, &self.1)?;
        append_packed(&mut data, &self.2)?;
        append_packed(&mut data, &self.3)?;
        append_packed(&mut data, &self.4)?;
        append_packed(&mut data, &self.5)?;
        append_packed(&mut data, &self.6)?;
        append_packed(&mut data, &self.7)?;
        append_packed(&mut data, &self.8)?;
        append_packed(&mut data, &self.9)?;
        append_packed(&mut data, &self.10)?;
        append_packed(&mut data, &self.11)?;
        assert(data@ =~= self.flattened());
        Ok(data)
    }
}

impl<
    A: Pack, B: Pack, C: Pack, D: Pack, E: Pack, F: Pack, G: Pack, H: Pack, J: Pack, K: Pack,
    L: Pack, M: Pack, N: Pack,
> ProcedureArgs for (
    A, B, C, D, E, F, G, H, J, K, L, M, N,
) {
    open spec fn flattened(self) -> Seq<u8> {
        self.0.packed() + self.1.packed() + self.2.packed() + self.3.packed() + self.4.packed()
            + self.5.packed() + self.6.packed() + self.7.packed() + self.8.packed()
            + self.9.packed() + self.10.packed() + self.11.packed() + self.12.packed()
    }

    open spec fn fallible(self) -> bool {
        self.0.fallible() || self.1.fallible() || self.2.fallible() || self.3.fallible()
            || self.4.fallible() || self.5.fallible() || self.6.fallible() || self.7.fallible()
            || self.8.fallible() || self.9.fallible() || self.10.fallible() || self.11.fallible()
            || self.12.fallible()
    }

    fn into_bytes(self) -> (result: Result<Vec<u8>, Error>) {
        let mut data: Vec<u8> = Vec::new();
        append_packed(&mut data, &self.0)?;
        append_packed(&mut data, &self.1)?;
        append_packed(&mut data, &self.2)?;
        append_packed(&mut data, &self.3)?;
        append_packed(&mut data, &self.4)?;
        append_packed(&mut data, &self.5)?;
        append_packed(&mut data, &self.6)?;
        append_packed(&mut data, &self.7)?;
        append_packed(&mut data, &self.8)?;
        append_packed(&mut data, &self.9)?;
        append_packed(&mut data, &self.10)?;
        append_packed(&mut data, &self.11)?;
        append_packed(&mut data, &self.12)?;
        assert(data@ =~= self.flattened());
        Ok(data)
    }
}

impl<
    A: Pack, B: Pack, C: Pack, D: Pack, E: Pack, F: Pack, G: Pack, H: Pack, J: Pack, K: Pack,
    L: Pack, M: Pack, N: Pack, P: Pack,
> ProcedureArgs for (
    A, B, C, D, E, F, G, H, J, K, L, M, N, P,
) {
    open spec fn flattened(self) -> Seq<u8> {
        self.0.packed() + self.1.packed() + self.2.packed() + self.3.packed() + self.4.packed()
            + self.5.packed() + self.6.packed() + self.7.packed() + self.8.packed()
            + self.9.packed() + self.10.packed() + self.11.packed() + self.12.packed()
            + self.13.packed()
    }

    open spec fn fallible(self) -> bool {
        self.0.fallible() || self.1.fallible() || self.2.fallible() || self.3.fallible()
            || self.4.fallible() || self.5.fallible() || self.6.fallible() || self.7.fallible()
            || self.8.fallible() || self.9.fallible() || self.10.fallible() || self.11.fallible()
            || self.12.fallible() || self.13.fallible()
    }

    fn into_bytes(self) -> (result: Result<Vec<u8>, Error>) {
        let mut data: Vec<u8> = Vec::new();
        append_packed(&mut data, &self.0)?;
        append_packed(&mut data, &self.1)?;
        append_packed(&mut data, &self.2)?;
        append_packed(&mut data, &self.3)?;
        append_packed(&mut data, &self.4)?;
        append_packed(&mut data, &self.5)?;
        append_packed(&mut data, &self.6)?;
        append_packed(&mut data, &self.7)?;
        append_packed(&mut data, &self.8)?;
        append_packed(&mut data, &self.9)?;
        append_packed(&mut data, &self.10)?;
        append_packed(&mut data, &self.11)?;
        append_packed(&mut data, &self.12)?;
        append_packed(&mut data, &self.13)?;
        assert(data@ =~= self.flattened());
        Ok(data)
    }
}

impl<
    A: Pack, B: Pack, C: Pack, D: Pack, E: Pack, F: Pack, G: Pack, H: Pack, J: Pack, K: Pack,
    L: Pack, M: Pack, N: Pack, P: Pack, Q: Pack,
> ProcedureArgs for (
    A, B, C, D, E, F, G, H, J, K, L, M, N, P, Q,
) {
    open spec fn flattened(self) -> Seq<u8> {
        self.0.packed() + self.1.packed() + self.2.packed() + self.3.packed() + self.4.packed()
            + self.5.packed() + self.6.packed() + self.7.packed() + self.8.packed()
            + self.9.packed() + self.10.packed() + self.11.packed() + self.12.packed()
            + self.13.packed() + self.14.packed()
    }

    open spec fn fallible(self) -> bool {
        self.0.fallible() || self.1.fallible() || self.2.fallible() || self.3.fallible()
            || self.4.fallible() || self.5.fallible() || self.6.fallible() || self.7.fallible()
            || self.8.fallible() || self.9.fallible() || self.10.fallible() || self.11.fallible()
            || self.12.fallible() || self.13.fallible() || self.14.fallible()
    }

    fn into_bytes(self) -> (result: Result<Vec<u8>, Error>) {
        let mut data: Vec<u8> = Vec::new();
        append_packed(&mut data, &self.0)?;
        append_packed(&mut data, &self.1)?;
        append_packed(&mut data, &self.2)?;
        append_packed(&mut data, &self.3)?;
        append_packed(&mut data, &self.4)?;
        append_packed(&mut data, &self.5)?;
        append_packed(&mut data, &self.6)?;
        append_packed(&mut data, &self.7)?;
        append_packed(&mut data, &self.8)?;
        append_packed(&mut data, &self.9)?;
        append_packed(&mut data, &self.10)?;
        append_packed(&mut data, &self.11)?;
        append_packed(&mut data, &self.12)?;
        append_packed(&mut data, &self.13)?;
        append_packed(&mut data, &self.14)?;
        assert(data@ =~= self.flattened());
        Ok(data)
    }
}

impl<
    A: Pack, B: Pack, C: Pack, D: Pack, E: Pack, F: Pack, G: Pack, H: Pack, J: Pack, K: Pack,
    L: Pack, M: Pack, N: Pack, P: Pack, Q: Pack, R: Pack,
> ProcedureArgs for (
    A, B, C, D, E, F, G, H, J, K, L, M, N, P, Q, R,
) {
    open spec fn flattened(self) -> Seq<u8> {
        self.0.packed() + self.1.packed() + self.2.packed() + self.3.packed() + self.4.packed()
            + self.5.packed() + self.6.packed() + self.7.packed() + self.8.packed()
            + self.9.packed() + self.10.packed() + self.11.packed() + self.12.packed()
            + self.13.packed() + self.14.packed() + self.15.packed()
    }

    open spec fn fallible(self) -> bool {
        self.0.fallible() || self.1.fallible() || self.2.fallible() || self.3.fallible()
            || self.4.fallible() || self.5.fallible() || self.6.fallible() || self.7.fallible()
            || self.8.fallible() || self.9.fallible() || self.10.fallible() || self.11.fallible()
            || self.12.fallible() || self.13.fallible() || self.14.fallible() || self.15.fallible()
    }

    fn into_bytes(self) -> (result: Result<Vec<u8>, Error>) {
        let mut data: Vec<u8> = Vec::new();
        append_packed(&mut data, &self.0)?;
        append_packed(&mut data, &self.1)?;
        append_packed(&mut data, &self.2)?;
        append_packed(&mut data, &self.3)?;
        append_packed(&mut data, &self.4)?;
        append_packed(&mut data, &self.5)?;
        append_packed(&mut data, &self.6)?;
        append_packed(&mut data, &self.7)?;
        append_packed(&mut data, &self.8)?;
        append_packed(&mut data, &self.9)?;
        append_packed(&mut data, &self.10)?;
        append_packed(&mut data, &self.11)?;
        append_packed(&mut data, &self.12)?;
        append_packed(&mut data, &self.13)?;
        append_packed(&mut data, &self.14)?;
        append_packed(&mut data, &self.15)?;
        assert(data@ =~= self.flattened());
        Ok(data)
    }
}

impl<
    A: Pack, B: Pack, C: Pack, D: Pack, E: Pack, F: Pack, G: Pack, H: Pack, J: Pack, K: Pack,
    L: Pack, M: Pack, N: Pack, P: Pack, Q: Pack, R: Pack, S: Pack,
> ProcedureArgs for (
    A, B, C, D, E, F, G, H, J, K, L, M, N, P, Q, R, S,
) {
    open spec fn flattened(self) -> Seq<u8> {
        self.0.packed() + self.1.packed() + self.2.packed() + self.3.packed() + self.4.packed()
            + self.5.packed() + self.6.packed() + self.7.packed() + self.8.packed()
            + self.9.packed() + self.10.packed() + self.11.packed() + self.12.packed()
            + self.13.packed() + self.14.packed() + self.15.packed() + self.16.packed()
    }

    open spec fn fallible(self) -> bool {
        self.0.fallible() || self.1.fallible() || self.2.fallible() || self.3.fallible()
            || self.4.fallible() || self.5.fallible() || self.6.fallible() || self.7.fallible()
            || self.8.fallible() || self.9.fallible() || self.10.fallible() || self.11.fallible()
            || self.12.fallible() || self.13.fallible() || self.14.fallible() || self.15.fallible()
            || self.16.fallible()
    }

    fn into_bytes(self) -> (result: Result<Vec<u8>, Error>) {
        let mut data: Vec<u8> = Vec::new();
        append_packed(&mut data, &self.0)?;
        append_packed(&mut data, &self.1)?;
        append_packed(&mut data, &self.2)?;
        append_packed(&mut data, &self.3)?;
        append_packed(&mut data, &self.4)?;
        append_packed(&mut data, &self.5)?;
        append_packed(&mut data, &self.6)?;
        append_packed(&mut data, &self.7)?;
        append_packed(&mut data, &self.8)?;
        append_packed(&mut data, &self.9)?;
        append_packed(&mut data, &self.10)?;
        append_packed(&mut data, &self.11)?;
        append_packed(&mut data, &self.12)?;
        append_packed(&mut data, &self.13)?;
        append_packed(&mut data, &self.14)?;
        append_packed(&mut data, &self.15)?;
        append_packed(&mut data, &self.16)?;
        assert(data@ =~= self.flattened());
        Ok(data)
    }
}

impl<
    A: Pack, B: Pack, C: Pack, D: Pack, E: Pack, F: Pack, G: Pack, H: Pack, J: Pack, K: Pack,
    L: Pack, M: Pack, N: Pack, P: Pack, Q: Pack, R: Pack, S: Pack, T: Pack,
> ProcedureArgs for (
    A, B, C, D, E, F, G, H, J, K, L, M, N, P, Q, R, S, T,
) {
    open spec fn flattened(self) -> Seq<u8> {
        self.0.packed() + self.1.packed() + self.2.packed() + self.3.packed() + self.4.packed()
            + self.5.packed() + self.6.packed() + self.7.packed() + self.8.packed()
            + self.9.packed() + self.10.packed() + self.11.packed() + self.12.packed()
            + self.13.packed() + self.14.packed() + self.15.packed() + self.16.packed()
            + self.17.packed()
    }

    open spec fn fallible(self) -> bool {
        self.0.fallible() || self.1.fallible() || self.2.fallible() || self.3.fallible()
            || self.4.fallible() || self.5.fallible() || self.6.fallible() || self.7.fallible()
            || self.8.fallible() || self.9.fallible() || self.10.fallible() || self.11.fallible()
            || self.12.fallible() || self.13.fallible() || self.14.fallible() || self.15.fallible()
            || self.16.fallible() || self.17.fallible()
    }

    fn into_bytes(self) -> (result: Result<Vec<u8>, Error>) {
        let mut data: Vec<u8> = Vec::new();
        append_packed(&mut data, &self.0)?;
        append_packed(&mut data, &self.1)?;
        append_packed(&mut data, &self.2)?;
        append_packed(&mut data, &self.3)?;
        append_packed(&mut data, &self.4)?;
        append_packed(&mut data, &self.5)?;
        append_packed(&mut data, &self.6)?;
        append_packed(&mut data, &self.7)?;
        append_packed(&mut data, &self.8)?;
        append_packed(&mut data, &self.9)?;
        append_packed(&mut data, &self.10)?;
        append_packed(&mut data, &self.11)?;
        append_packed(&mut data, &self.12)?;
        append_packed(&mut data, &self.13)?;
        append_packed(&mut data, &self.14)?;
        append_packed(&mut data, &self.15)?;
        append_packed(&mut data, &self.16)?;
        append_packed(&mut data, &self.17)?;
        assert(data@ =~= self.flattened());
        Ok(data)
    }
}

impl<
    A: Pack, B: Pack, C: Pack, D: Pack, E: Pack, F: Pack, G: Pack, H: Pack, J: Pack, K: Pack,
    L: Pack, M: Pack, N: Pack, P: Pack, Q: Pack, R: Pack, S: Pack, T: Pack, U: Pack,
> ProcedureArgs for (
    A, B, C, D, E, F, G, H, J, K, L, M, N, P, Q, R, S, T, U,
) {
    open spec fn flattened(self) -> Seq<u8> {
        self.0.packed() + self.1.packed() + self.2.packed() + self.3.packed() + self.4.packed()
            + self.5.packed() + self.6.packed() + self.7.packed() + self.8.packed()
            + self.9.packed() + self.10.packed() + self.11.packed() + self.12.packed()
            + self.13.packed() + self.14.packed() + self.15.packed() + self.16.packed()
            + self.17.packed() + self.18.packed()
    }

    open spec fn fallible(self) -> bool {
        self.0.fallible() || self.1.fallible() || self.2.fallible() || self.3.fallible()
            || self.4.fallible() || self.5.fallible() || self.6.fallible() || self.7.fallible()
            || self.8.fallible() || self.9.fallible() || self.10.fallible() || self.11.fallible()
            || self.12.fallible() || self.13.fallible() || self.14.fallible() || self.15.fallible()
            || self.16.fallible() || self.17.fallible() || self.18.fallible()
    }

    fn into_bytes(self) -> (result: Result<Vec<u8>, Error>) {
        let mut data: Vec<u8> = Vec::new();
        append_packed(&mut data, &self.0)?;
        append_packed(&mut data, &self.1)?;
        append_packed(&mut data, &self.2)?;
        append_packed(&mut data, &self.3)?;
        append_packed(&mut data, &self.4)?;
        append_packed(&mut data, &self.5)?;
        append_packed(&mut data, &self.6)?;
        append_packed(&mut data, &self.7)?;
        append_packed(&mut data, &self.8)?;
        append_packed(&mut data, &self.9)?;
        append_packed(&mut data, &self.10)?;
        append_packed(&mut data, &self.11)?;
        append_packed(&mut data, &self.12)?;
        append_packed(&mut data, &self.13)?;
        append_packed(&mut data, &self.14)?;
        append_packed(&mut data, &self.15)?;
        append_packed(&mut data, &self.16)?;
        append_packed(&mut data, &self.17)?;
        append_packed(&mut data, &self.18)?;
        assert(data@ =~= self.flattened());
        Ok(data)
    }
}

impl<
    A: Pack, B: Pack, C: Pack, D: Pack, E: Pack, F: Pack, G: Pack, H: Pack, J: Pack, K: Pack,
    L: Pack, M: Pack, N: Pack, P: Pack, Q: Pack, R: Pack, S: Pack, T: Pack, U: Pack, V: Pack,
> ProcedureArgs for (
    A, B, C, D, E, F, G, H, J, K, L, M, N, P, Q, R, S, T, U, V,
) {
    open spec fn flattened(self) -> Seq<u8> {
        self.0.packed() + self.1.packed() + self.2.packed() + self.3.packed() + self.4.packed()
            + self.5.packed() + self.6.packed() + self.7.packed() + self.8.packed()
            + self.9.packed() + self.10.packed() + self.11.packed() + self.12.packed()
            + self.13.packed() + self.14.packed() + self.15.packed() + self.16.packed()
            + self.17.packed() + self.18.packed() + self.19.packed()
    }

    open spec fn fallible(self) -> bool {
        self.0.fallible() || self.1.fallible() || self.2.fallible() || self.3.fallible()
            || self.4.fallible() || self.5.fallible() || self.6.fallible() || self.7.fallible()
            || self.8.fallible() || self.9.fallible() || self.10.fallible() || self.11.fallible()
            || self.12.fallible() || self.13.fallible() || self.14.fallible() || self.15.fallible()
            || self.16.fallible() || self.17.fallible() || self.18.fallible() || self.19.fallible()
    }

    fn into_bytes(self) -> (result: Result<Vec<u8>, Error>) {
        let mut data: Vec<u8> = Vec::new();
        append_packed(&mut data, &self.0)?;
        append_packed(&mut data, &self.1)?;
        append_packed(&mut data, &self.2)?;
        append_packed(&mut data, &self.3)?;
        append_packed(&mut data, &self.4)?;
        append_packed(&mut data, &self.5)?;
        append_packed(&mut data, &self.6)?;
        append_packed(&mut data, &self.7)?;
        append_packed(&mut data, &self.8)?;
        append_packed(&mut data, &self.9)?;
        append_packed(&mut data, &self.10)?;
        append_packed(&mut data, &self.11)?;
        append_packed(&mut data, &self.12)?;
        append_packed(&mut data, &self.13)?;
        append_packed(&mut data, &self.14)?;
        append_packed(&mut data, &self.15)?;
        append_packed(&mut data, &self.16)?;
        append_packed(&mut data, &self.17)?;
        append_packed(&mut data, &self.18)?;
        append_packed(&mut data, &self.19)?;
        assert(data@ =~= self.flattened());
        Ok(data)
    }
}

/// Tuples, whose lengths have to be known so that the correct MessagePack length marker can be
/// inserted when arguments that were provided piecemeal are deserialised.
pub trait Tuple {
    /// The number of elements.
    spec fn arity() -> nat;

    /// Gets the number of elements.
    fn len() -> (len: u32)
        ensures
            len == Self::arity(),
    ;
}

impl Tuple for () {
    open spec fn arity() -> nat {
        0
    }

    fn len() -> (len: u32) {
        0
    }
}

impl<A> Tuple for (A,) {
    open spec fn arity() -> nat {
        1
    }

    fn len() -> (len: u32) {
        1
    }
}

impl<A, B> Tuple for (A, B) {
    open spec fn arity() -> nat {
        2
    }

    fn len() -> (len: u32) {
        2
    }
}

impl<A, B, C> Tuple for (A, B, C) {
    open spec fn arity() -> nat {
        3
    }

    fn len() -> (len: u32) {
        3
    }
}

impl<A, B, C, D> Tuple for (A, B, C, D) {
    open spec fn arity() -> nat {
        4
    }

    fn len() -> (len: u32) {
        4
    }
}

impl<A, B, C, D, E> Tuple for (A, B, C, D, E) {
    open spec fn arity() -> nat {
        5
    }

    fn len() -> (len: u32) {
        5
    }
}

impl<A, B, C, D, E, F> Tuple for (A, B, C, D, E, F) {
    open spec fn arity() -> nat {
        6
    }

    fn len() -> (len: u32) {
        6
    }
}

impl<A, B, C, D, E, F, G> Tuple for (A, B, C, D, E, F, G) {
    open spec fn arity() -> nat {
        7
    }

    fn len() -> (len: u32) {
        7
    }
}

impl<A, B, C, D, E, F, G, H> Tuple for (A, B, C, D, E, F, G, H) {
    open spec fn arity() -> nat {
        8
    }

    fn len() -> (len: u32) {
        8
    }
}

impl<A, B, C, D, E, F, G, H, J> Tuple for (A, B, C, D, E, F, G, H, J) {
    open spec fn arity() -> nat {
        9
    }

    fn len() -> (len: u32) {
        9
    }
}

impl<A, B, C, D, E, F, G, H, J, K> Tuple for (A, B, C, D, E, F, G, H, J, K) {
    open spec fn arity() -> nat {
        10
    }

    fn len() -> (len: u32) {
        10
    }
}

impl<A, B, C, D, E, F, G, H, J, K, L> Tuple for (A, B, C, D, E, F, G, H, J, K, L) {
    open spec fn arity() -> nat {
        11
    }

    fn len() -> (len: u32) {
        11
    }
}

impl<A, B, C, D, E, F, G, H, J, K, L, M> Tuple for (A, B, C, D, E, F, G, H, J, K, L, M) {
    open spec fn arity() -> nat {
        12
    }

    fn len() -> (len: u32) {
        12
    }
}

impl<A, B, C, D, E, F, G, H, J, K, L, M, N> Tuple for (A, B, C, D, E, F, G, H, J, K, L, M, N) {
    open spec fn arity() -> nat {
        13
    }

    fn len() -> (len: u32) {
        13
    }
}

impl<A, B, C, D, E, F, G, H, J, K, L, M, N, P> Tuple for (
    A, B, C, D, E, F, G, H, J, K, L, M, N, P,
) {
    open spec fn arity() -> nat {
        14
    }

    fn len() -> (len: u32) {
        14
    }
}

impl<A, B, C, D, E, F, G, H, J, K, L, M, N, P, Q> Tuple for (
    A, B, C, D, E, F, G, H, J, K, L, M, N, P, Q,
) {
    open spec fn arity() -> nat {
        15
    }

    fn len() -> (len: u32) {
        15
    }
}

impl<A, B, C, D, E, F, G, H, J, K, L, M, N, P, Q, R> Tuple for (
    A, B, C, D, E, F, G, H, J, K, L, M, N, P, Q, R,
) {
    open spec fn arity() -> nat {
        16
    }

    fn len() -> (len: u32) {
        16
    }
}

impl<A, B, C, D, E, F, G, H, J, K, L, M, N, P, Q, R, S> Tuple for (
    A, B, C, D, E, F, G, H, J, K, L, M, N, P, Q, R, S,
) {
    open spec fn arity() -> nat {
        17
    }

    fn len() -> (len: u32) {
        17
    }
}

impl<A, B, C, D, E, F, G, H, J, K, L, M, N, P, Q, R, S, T> Tuple for (
    A, B, C, D, E, F, G, H, J, K, L, M, N, P, Q, R, S, T,
) {
    open spec fn arity() -> nat {
        18
    }

    fn len() -> (len: u32) {
        18
    }
}

impl<A, B, C, D, E, F, G, H, J, K, L, M, N, P, Q, R, S, T, U> Tuple for (
    A, B, C, D, E, F, G, H, J, K, L, M, N, P, Q, R, S, T, U,
) {
    open spec fn arity() -> nat {
        19
    }

    fn len() -> (len: u32) {
        19
    }
}

impl<A, B, C, D, E, F, G, H, J, K, L, M, N, P, Q, R, S, T, U, V> Tuple for (
    A, B, C, D, E, F, G, H, J, K, L, M, N, P, Q, R, S, T, U, V,
) {
    open spec fn arity() -> nat {
        20
    }

    fn len() -> (len: u32) {
        20
    }
}

} // verus!
