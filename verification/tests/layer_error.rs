use caligula::util::layer_error::{LayerError, LayerResultExt, NestedResultExt};
use caligula::util::stdiomux::util::{self as smux_util, rotate_layer_error};

type L = LayerError<&'static str, u32>;

#[test]
fn unwrap_app_gives_the_application_error() {
    assert_eq!(L::App("boom").unwrap_app(), "boom");
}

#[test]
fn map_trans_maps_only_transport_errors() {
    assert_eq!(L::App("a").map_trans(|t| t + 1), LayerError::<&str, u32>::App("a"));
    assert_eq!(L::Transport(4).map_trans(|t| t * 10), LayerError::<&str, u32>::Transport(40));
}

#[test]
fn flatten_moves_errors_into_layers() {
    let ok: Result<Result<u8, &str>, u32> = Ok(Ok(1));
    let app: Result<Result<u8, &str>, u32> = Ok(Err("app"));
    let trans: Result<Result<u8, &str>, u32> = Err(9);
    assert_eq!(ok.flatten_into_layered(), Ok(1));
    assert_eq!(app.flatten_into_layered(), Err(LayerError::App("app")));
    assert_eq!(trans.flatten_into_layered(), Err(LayerError::Transport(9)));
}

#[test]
fn rotate_undoes_flatten() {
    let cases: Vec<Result<Result<u8, &str>, u32>> = vec![Ok(Ok(1)), Ok(Err("app")), Err(9)];
    for c in cases {
        assert_eq!(c.clone().flatten_into_layered().rotate_into_ok(), c);
    }
}

#[test]
fn rotate_layer_error_moves_application_errors_into_ok() {
    let ok: Result<u8, smux_util::LayerError<&str, u32>> = Ok(1);
    let app: Result<u8, smux_util::LayerError<&str, u32>> = Err(smux_util::LayerError::App("a"));
    let trans: Result<u8, smux_util::LayerError<&str, u32>> =
        Err(smux_util::LayerError::Transport(2));
    assert_eq!(rotate_layer_error(ok), Ok(Ok(1)));
    assert_eq!(rotate_layer_error(app), Ok(Err("a")));
    assert_eq!(rotate_layer_error(trans), Err(2));
}

#[test]
fn map_trans_by_identity_and_by_composition() {
    assert_eq!(L::Transport(7).map_trans(|t| t), L::Transport(7));
    assert_eq!(L::App("x").map_trans(|t| t), L::App("x"));
    let twice = L::Transport(3).map_trans(|t| t + 1).map_trans(|t| t * 2);
    let once = L::Transport(3).map_trans(|t| (t + 1) * 2);
    assert_eq!(twice, once);
    assert_eq!(twice, L::Transport(8));
}
