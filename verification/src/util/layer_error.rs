use vstd::prelude::*;

verus! {

/// An error that happened either in the application or in the transport
/// layer below it.
#[derive(Debug, PartialEq, Eq, Clone)]
pub enum LayerError<App, Trans> {
    App(App),
    Transport(Trans),
}

impl<App, Trans> LayerError<App, Trans> {
    /// The application error. Only for an application error: a transport
    /// error here is a bug of the caller.
    pub fn unwrap_app(self) -> (r: App)
        requires
            self is App,
        ensures
            self == LayerError::<App, Trans>::App(r),
    {
        match self {
            LayerError::App(err) => err,
            LayerError::Transport(_) => unreached(),
        }
    }

    /// The same error with its transport error mapped by `f`.
    pub fn map_trans<T2, F: FnOnce(Trans) -> T2>(self, f: F) -> (r: LayerError<App, T2>)
        requires
            self matches LayerError::Transport(t) ==> f.requires((t,)),
        ensures
            self matches LayerError::App(a) ==> r == LayerError::<App, T2>::App(a),
            self matches LayerError::Transport(t) ==> (r matches LayerError::Transport(u) && f.ensures((t,), u)),
            trans_mapped(self, r, |t: Trans, u: T2| f.ensures((t,), u)),
    {
        match self {
            LayerError::App(err) => LayerError::App(err),
            LayerError::Transport(err) => LayerError::Transport(f(err)),
        }
    }
}

/// Unnesting of a result whose value is itself a result.
pub trait NestedResultExt<T, App, Trans>: Sized {
    /// Unnests this result by turning the inner error into an application
    /// error and the outer one into a transport error.
    fn flatten_into_layered(self) -> Result<T, LayerError<App, Trans>>;
}

impl<T, App, Trans> NestedResultExt<T, App, Trans> for Result<Result<T, App>, Trans> {
    fn flatten_into_layered(self) -> (r: Result<T, LayerError<App, Trans>>)
        ensures
            r == flatten_spec(self),
    {
        match self {
            Ok(Ok(x)) => Ok(x),
            Ok(Err(app)) => Err(LayerError::App(app)),
            Err(trans) => Err(LayerError::Transport(trans)),
        }
    }
}

/// Elimination of a layered error.
pub trait LayerResultExt<T, App, Trans>: Sized {
    /// Eliminates this result's layered error by moving application errors
    /// into the `Ok`.
    fn rotate_into_ok(self) -> Result<Result<T, App>, Trans>;
}

impl<T, App, Trans> LayerResultExt<T, App, Trans> for Result<T, LayerError<App, Trans>> {
    fn rotate_into_ok(self) -> (r: Result<Result<T, App>, Trans>)
        ensures
            r == rotate_spec(self),
    {
        match self {
            Ok(x) => Ok(Ok(x)),
            Err(LayerError::App(app)) => Ok(Err(app)),
            Err(LayerError::Transport(trans)) => Err(trans),
        }
    }
}

/// A nested result as a layered one.
pub open spec fn flatten_spec<T, App, Trans>(r: Result<Result<T, App>, Trans>) -> Result<
    T,
    LayerError<App, Trans>,
> {
    match r {
        Ok(Ok(x)) => Ok(x),
        Ok(Err(app)) => Err(LayerError::App(app)),
        Err(trans) => Err(LayerError::Transport(trans)),
    }
}

/// A layered result as a nested one.
pub open spec fn rotate_spec<T, App, Trans>(r: Result<T, LayerError<App, Trans>>) -> Result<
    Result<T, App>,
    Trans,
> {
    match r {
        Ok(x) => Ok(Ok(x)),
        Err(LayerError::App(app)) => Ok(Err(app)),
        Err(LayerError::Transport(trans)) => Err(trans),
    }
}

/// Flattening and rotating undo each other: no error is lost or moved
/// between the layers.
pub proof fn lemma_flatten_rotate_inverse<T, App, Trans>(
    nested: Result<Result<T, App>, Trans>,
    layered: Result<T, LayerError<App, Trans>>,
)
    ensures
        rotate_spec(flatten_spec(nested)) == nested,
        flatten_spec(rotate_spec(layered)) == layered,
{
}

/// Whether `r` is `e` with its transport error mapped by a function whose
/// possible results are given by `maps`: an application error stays as it
/// is, a transport error `t` becomes some `u` with `maps(t, u)`.
pub open spec fn trans_mapped<App, T, U>(
    e: LayerError<App, T>,
    r: LayerError<App, U>,
    maps: spec_fn(T, U) -> bool,
) -> bool {
    match (e, r) {
        (LayerError::App(a), LayerError::App(b)) => a == b,
        (LayerError::Transport(t), LayerError::Transport(u)) => maps(t, u),
        _ => false,
    }
}

/// Mapping the transport error by the identity gives the error back.
pub proof fn lemma_map_trans_identity<App, T>(e: LayerError<App, T>, r: LayerError<App, T>)
    requires
        trans_mapped(e, r, |t: T, u: T| u == t),
    ensures
        r == e,
{
}

/// Mapping by `f` and then by `g` is mapping by their composition: the
/// layer of the error is kept, and a transport error `t` ends as some `v`
/// reached from `t` through a result of `f`.
pub proof fn lemma_map_trans_compose<App, T, U, V>(
    e: LayerError<App, T>,
    r1: LayerError<App, U>,
    r2: LayerError<App, V>,
    f: spec_fn(T, U) -> bool,
    g: spec_fn(U, V) -> bool,
)
    requires
        trans_mapped(e, r1, f),
        trans_mapped(r1, r2, g),
    ensures
        trans_mapped(e, r2, |t: T, v: V| exists|u: U| #[trigger] f(t, u) && g(u, v)),
{
    match (e, r1, r2) {
        (LayerError::Transport(t), LayerError::Transport(u), LayerError::Transport(v)) => {
            assert(f(t, u) && g(u, v));
        },
        _ => {},
    }
}

} // verus!
