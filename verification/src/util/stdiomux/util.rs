use vstd::prelude::*;

verus! {

/// A stream service built from a function.
pub struct ServiceFn<F>(pub F);

/// Makes a stream service from a function.
pub fn service_fn<F>(f: F) -> (r: ServiceFn<F>)
    ensures
        r.0 == f,
{
    ServiceFn(f)
}

/// An error that happened either in the application or in the transport
/// layer below it.
#[derive(Debug, PartialEq, Eq, Clone)]
pub enum LayerError<App, Trans> {
    App(App),
    Transport(Trans),
}

/// A layered result as a nested one: application errors move into the
/// `Ok`, transport errors stay errors.
pub open spec fn rotate_spec<T, App, Trans>(r: Result<T, LayerError<App, Trans>>) -> Result<
    Result<T, App>,
    Trans,
> {
    match r {
        Ok(x) => Ok(Ok(x)),
        Err(LayerError::App(app)) => Ok(Err(app)),
        Err(LayerError::Transport(trans)) => Err(trans),
    }
}

/// Eliminates the layered errors of a result by moving application errors
/// into the `Ok`.
pub fn rotate_layer_error<T, App, Trans>(res: Result<T, LayerError<App, Trans>>) -> (r: Result<
    Result<T, App>,
    Trans,
>)
    ensures
        r == rotate_spec(res),
{
    match res {
        Ok(x) => Ok(Ok(x)),
        Err(LayerError::App(app)) => Ok(Err(app)),
        Err(LayerError::Transport(trans)) => Err(trans),
    }
}

} // verus!
