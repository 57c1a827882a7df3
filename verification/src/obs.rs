//! Settings for reaching OBS Studio over its websocket.
use vstd::prelude::*;
use crate::json::str_views;
use crate::text::{decimal, is_digit, law_decimal_numeral, numeral_value, push_decimal, push_str};

verus! {

/// The websocket port OBS is reached on unless told otherwise.
pub const OBS_DEFAULT_PORT: u16 = 4455;

/// The command-line arguments that start OBS with its websocket on `port`,
/// guarded by `password` where one is given.
pub open spec fn launch_args(port: u16, password: Option<Seq<char>>) -> Seq<Seq<char>> {
    let base = seq!["--websocket_port="@ + decimal(port as nat)];
    match password {
        Some(p) => base.push("--websocket_password="@ + p),
        None => base,
    }
}

/// The command-line arguments that start OBS with its websocket on `port`,
/// guarded by `password` where one is given.
pub fn obs_launch_args(port: u16, password: &Option<String>) -> (args: Vec<String>)
    ensures
        str_views(args@) == launch_args(
            port,
            match password {
                Some(p) => Some(p@),
                None => None,
            },
        ),
        args@.len() == str_views(args@).len(),
        forall|i: int| 0 <= i < args@.len() ==> #[trigger] args@[i]@ == str_views(args@)[i],
{
    let mut args: Vec<String> = Vec::new();
    let mut port_arg = String::new();
    push_str(&mut port_arg, "--websocket_port=");
    push_decimal(&mut port_arg, port as u64);
    args.push(port_arg);
    match password {
        Some(p) => {
            let mut pass_arg = String::new();
            push_str(&mut pass_arg, "--websocket_password=");
            push_str(&mut pass_arg, p.as_str());
            args.push(pass_arg);
        },
        None => {},
    }
    proof {
        assert(str_views(args@) =~= launch_args(
            port,
            match password {
                Some(p) => Some(p@),
                None => None,
            },
        ));
    }
    args
}

/// The first argument is `--websocket_port=` followed by the digits of
/// `port`, which read back as `port`; the password, when given, follows
/// whole in a second argument, and there is no other argument.
pub proof fn law_launch_args(port: u16, password: Option<Seq<char>>)
    ensures
        launch_args(port, password).len() == (if password is Some { 2int } else { 1int }),
        launch_args(port, password)[0].take(17) == "--websocket_port="@,
        numeral_value(launch_args(port, password)[0].skip(17)) == port,
        forall|i: int| 17 <= i < launch_args(port, password)[0].len() ==> is_digit(
            #[trigger] launch_args(port, password)[0][i],
        ),
        password matches Some(p) ==> launch_args(port, password)[1] == "--websocket_password="@ + p,
{
    reveal_strlit("--websocket_port=");
    law_decimal_numeral(port as nat);
    let a = launch_args(port, password)[0];
    assert(a == "--websocket_port="@ + decimal(port as nat));
    assert(a.take(17) =~= "--websocket_port="@);
    assert(a.skip(17) =~= decimal(port as nat));
    assert forall|i: int| 17 <= i < a.len() implies is_digit(#[trigger] a[i]) by {
        assert(a[i] == decimal(port as nat)[i - 17]);
    }
}

} // verus!
