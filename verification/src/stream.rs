//! What comes out of the serial streams, and how it is passed on.
use vstd::prelude::*;

verus! {

/// How a read with a time limit went.
#[derive(Debug, PartialEq, Eq)]
pub enum ReadOutcome<T, E> {
    /// Nothing came in time.
    TimedOut,
    /// A value was decoded.
    Item(T),
    /// The read failed.
    Failed(E),
    /// The port has no more to give.
    Ended,
}

/// What is done with the next item of a stream.
#[derive(Debug, PartialEq, Eq)]
pub enum Relay<T, E> {
    /// The value is passed on, and the next item is awaited.
    Forward(T),
    /// The stream is left, with this result.
    Finish(Result<(), E>),
}

/// Values are passed on, an error is returned, and the end of the stream is a success.
pub open spec fn relayed<T, E>(item: Option<Result<T, E>>) -> Relay<T, E> {
    match item {
        Some(Ok(value)) => Relay::Forward(value),
        Some(Err(e)) => Relay::Finish(Err(e)),
        None => Relay::Finish(Ok(())),
    }
}

/// Decides what is done with the next item of a stream, or with its end.
pub fn relay<T, E>(item: Option<Result<T, E>>) -> (next: Relay<T, E>)
    ensures
        next == relayed(item),
        item matches Some(Ok(value)) ==> next == Relay::<T, E>::Forward(value),
        item matches Some(Err(e)) ==> next == Relay::<T, E>::Finish(Err(e)),
        item is None ==> next == Relay::<T, E>::Finish(Ok(())),
{
    match item {
        Some(Ok(value)) => Relay::Forward(value),
        Some(Err(e)) => Relay::Finish(Err(e)),
        None => Relay::Finish(Ok(())),
    }
}

/// The values that are passed on, and the result in the end, of a stream with these items.
pub open spec fn relay_all<T, E>(items: Seq<Result<T, E>>) -> (Seq<T>, Result<(), E>)
    decreases items.len(),
{
    let item = if items.len() == 0 { None } else { Some(items.first()) };
    match relayed(item) {
        Relay::Finish(result) => (Seq::empty(), result),
        Relay::Forward(value) => {
            let rest = relay_all(items.drop_first());
            (seq![value] + rest.0, rest.1)
        },
    }
}

/// A stream without errors is passed on whole and ends well. With an error in it, what comes
/// before the first one is passed on, the error is returned, and what comes behind is not looked
/// at.
pub proof fn relay_passes_values_up_to_an_error<T, E>(
    values: Seq<T>,
    error: Option<E>,
    rest: Seq<Result<T, E>>,
)
    ensures
        error is None ==> relay_all(values.map_values(|v: T| Ok::<T, E>(v))) == (values, Ok::<
            (),
            E,
        >(())),
        error matches Some(e) ==> relay_all(
            values.map_values(|v: T| Ok::<T, E>(v)) + seq![Err::<T, E>(e)] + rest,
        ) == (values, Err::<(), E>(e)),
    decreases values.len(),
{
    let ok = |v: T| Ok::<T, E>(v);
    let tail = match error {
        Some(e) => seq![Err::<T, E>(e)] + rest,
        None => Seq::empty(),
    };
    let items = values.map_values(ok) + tail;
    assert(error is None ==> items =~= values.map_values(ok));
    assert(error matches Some(e) ==> items =~= values.map_values(ok) + seq![Err::<T, E>(e)] + rest);
    if values.len() == 0 {
        assert(values =~= Seq::empty());
        assert(items =~= tail);
    } else {
        let fewer = values.drop_first();
        relay_passes_values_up_to_an_error(fewer, error, rest);
        let less = fewer.map_values(ok) + tail;
        assert(error is None ==> less =~= fewer.map_values(ok));
        assert(error matches Some(e) ==> less =~= fewer.map_values(ok) + seq![Err::<T, E>(e)]
            + rest);
        assert(items.drop_first() =~= less);
        assert(items.first() == Ok::<T, E>(values.first()));
        assert(seq![values.first()] + fewer =~= values);
    }
}

/// A value is passed on just where it is the next item, an error is returned just where it is, and
/// all is well just where the stream is over. So what was done tells what the item was.
pub proof fn relaying_tells_the_item<T, E>(item: Option<Result<T, E>>, value: T, error: E)
    ensures
        relayed(item) == Relay::<T, E>::Forward(value) <==> item == Some(Ok::<T, E>(value)),
        relayed(item) == Relay::<T, E>::Finish(Err(error)) <==> item == Some(Err::<T, E>(error)),
        relayed(item) == Relay::<T, E>::Finish(Ok(())) <==> item is None,
{
}

} // verus!
