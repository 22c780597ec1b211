//! The operation façade: each externally invokable action maps to one fixed
//! argument list for the runtime binary. An unknown lifecycle action is
//! rejected here, before anything could be spawned.

use vstd::prelude::*;

use crate::text::{all_digits, dec_val, digit_val, is_digit, str_eq};

verus! {

/// The exact argument list of a lifecycle action, `None` for an unknown
/// action name.
pub open spec fn spec_action_args(action: Seq<char>, id: Seq<char>) -> Option<Seq<Seq<char>>> {
    if action == "start"@ {
        Some(seq!["start"@, id])
    } else if action == "stop"@ {
        Some(seq!["stop"@, id])
    } else if action == "restart"@ {
        Some(seq!["restart"@, id])
    } else if action == "remove"@ {
        Some(seq!["rm"@, "-f"@, id])
    } else if action == "pause"@ {
        Some(seq!["pause"@, id])
    } else if action == "unpause"@ {
        Some(seq!["unpause"@, id])
    } else {
        None
    }
}

fn two_args(a: &str, id: &str) -> (r: Vec<String>)
    ensures
        r.deep_view() == seq![a@, id@],
{
    let mut v: Vec<String> = Vec::new();
    v.push(String::from_str(a));
    v.push(String::from_str(id));
    proof {
        assert(v.deep_view() =~= seq![a@, id@]);
    }
    v
}

/// Maps a lifecycle action name to its exact invocation; an unrecognized
/// name is rejected with an error naming it, and nothing else happens.
pub fn container_action_args(container_id: &str, action: &str) -> (r: Result<Vec<String>, String>)
    ensures
        (match r {
            Ok(v) => Some(v.deep_view()),
            Err(_) => None::<Seq<Seq<char>>>,
        }) == spec_action_args(action@, container_id@),
        r is Err ==> r->Err_0@ == "Unknown action: "@ + action@,
{
    if str_eq(action, "start") {
        Ok(two_args("start", container_id))
    } else if str_eq(action, "stop") {
        Ok(two_args("stop", container_id))
    } else if str_eq(action, "restart") {
        Ok(two_args("restart", container_id))
    } else if str_eq(action, "remove") {
        let mut v: Vec<String> = Vec::new();
        v.push(String::from_str("rm"));
        v.push(String::from_str("-f"));
        v.push(String::from_str(container_id));
        proof {
            assert(v.deep_view() =~= seq!["rm"@, "-f"@, container_id@]);
        }
        Ok(v)
    } else if str_eq(action, "pause") {
        Ok(two_args("pause", container_id))
    } else if str_eq(action, "unpause") {
        Ok(two_args("unpause", container_id))
    } else {
        Err(String::from_str("Unknown action: ").concat(action))
    }
}

fn digit_str(d: u32) -> (r: &'static str)
    requires
        d <= 9,
    ensures
        r@.len() == 1,
        is_digit(r@[0]),
        digit_val(r@[0]) == d,
{
    proof {
        reveal_strlit("0");
        reveal_strlit("1");
        reveal_strlit("2");
        reveal_strlit("3");
        reveal_strlit("4");
        reveal_strlit("5");
        reveal_strlit("6");
        reveal_strlit("7");
        reveal_strlit("8");
        reveal_strlit("9");
    }
    match d {
        0 => "0",
        1 => "1",
        2 => "2",
        3 => "3",
        4 => "4",
        5 => "5",
        6 => "6",
        7 => "7",
        8 => "8",
        _ => "9",
    }
}

/// Renders a number in decimal: the unique digit string with this value and
/// no leading zero.
pub fn u32_to_string(n: u32) -> (s: String)
    ensures
        all_digits(s@),
        dec_val(s@) == n,
        s@.len() >= 1,
        s@.len() > 1 ==> s@[0] != '0',
    decreases n,
{
    if n < 10 {
        let s = String::from_str(digit_str(n));
        proof {
            assert(s@.drop_last() =~= Seq::<char>::empty());
            assert(dec_val(Seq::<char>::empty()) == 0);
            assert(dec_val(s@) == digit_val(s@[0]));
        }
        s
    } else {
        let hi = u32_to_string(n / 10);
        let ghost hv = hi@;
        let s = hi.concat(digit_str(n % 10));
        proof {
            vstd::arithmetic::div_mod::lemma_fundamental_div_mod(n as int, 10);
            assert(s@.drop_last() =~= hv);
            assert(s@.last() == s@[s@.len() - 1]);
            assert(dec_val(s@) == dec_val(hv) * 10 + digit_val(s@.last()));
            if dec_val(hv) >= 1 {
                assert(hv[0] != '0') by {
                    if hv.len() == 1 {
                        assert(dec_val(hv.drop_last()) == 0);
                    }
                }
            }
        }
        s
    }
}

/// The fixed listing invocation for containers.
pub fn list_containers_args() -> (r: Vec<String>)
    ensures
        r.deep_view() == seq!["ps"@, "-a"@, "--format"@, "{{json .}}"@],
{
    let mut v: Vec<String> = Vec::new();
    v.push(String::from_str("ps"));
    v.push(String::from_str("-a"));
    v.push(String::from_str("--format"));
    v.push(String::from_str("{{json .}}"));
    proof {
        assert(v.deep_view() =~= seq!["ps"@, "-a"@, "--format"@, "{{json .}}"@]);
    }
    v
}

/// The fixed log-fetching invocation: a numeric tail length, then the
/// container identifier.
pub fn logs_args(container_id: &str, tail: u32) -> (r: Vec<String>)
    ensures
        r.deep_view().len() == 4,
        r.deep_view()[0] == "logs"@,
        r.deep_view()[1] == "--tail"@,
        all_digits(r.deep_view()[2]) && dec_val(r.deep_view()[2]) == tail,
        r.deep_view()[3] == container_id@,
{
    let mut v: Vec<String> = Vec::new();
    v.push(String::from_str("logs"));
    v.push(String::from_str("--tail"));
    v.push(u32_to_string(tail));
    v.push(String::from_str(container_id));
    v
}

/// The fixed inspection invocation.
pub fn inspect_args(container_id: &str) -> (r: Vec<String>)
    ensures
        r.deep_view() == seq!["inspect"@, container_id@],
{
    two_args("inspect", container_id)
}

/// The fixed non-streaming stats invocation for one container.
pub fn stats_args(container_id: &str) -> (r: Vec<String>)
    ensures
        r.deep_view() == seq!["stats"@, "--no-stream"@, "--format"@, "{{json .}}"@, container_id@],
{
    let mut v: Vec<String> = Vec::new();
    v.push(String::from_str("stats"));
    v.push(String::from_str("--no-stream"));
    v.push(String::from_str("--format"));
    v.push(String::from_str("{{json .}}"));
    v.push(String::from_str(container_id));
    proof {
        assert(v.deep_view() =~= seq![
            "stats"@,
            "--no-stream"@,
            "--format"@,
            "{{json .}}"@,
            container_id@,
        ]);
    }
    v
}

/// The fixed listing invocation for images.
pub fn list_images_args() -> (r: Vec<String>)
    ensures
        r.deep_view() == seq!["images"@, "--format"@, "{{json .}}"@],
{
    let mut v: Vec<String> = Vec::new();
    v.push(String::from_str("images"));
    v.push(String::from_str("--format"));
    v.push(String::from_str("{{json .}}"));
    proof {
        assert(v.deep_view() =~= seq!["images"@, "--format"@, "{{json .}}"@]);
    }
    v
}

/// The fixed image-removal invocation.
pub fn remove_image_args(image_id: &str) -> (r: Vec<String>)
    ensures
        r.deep_view() == seq!["rmi"@, image_id@],
{
    two_args("rmi", image_id)
}

/// The fixed image-pull invocation.
pub fn pull_image_args(image_name: &str) -> (r: Vec<String>)
    ensures
        r.deep_view() == seq!["pull"@, image_name@],
{
    two_args("pull", image_name)
}

/// The fixed listing invocation for volumes.
pub fn list_volumes_args() -> (r: Vec<String>)
    ensures
        r.deep_view() == seq!["volume"@, "ls"@, "--format"@, "{{json .}}"@],
{
    let mut v: Vec<String> = Vec::new();
    v.push(String::from_str("volume"));
    v.push(String::from_str("ls"));
    v.push(String::from_str("--format"));
    v.push(String::from_str("{{json .}}"));
    proof {
        assert(v.deep_view() =~= seq!["volume"@, "ls"@, "--format"@, "{{json .}}"@]);
    }
    v
}

/// The fixed volume-removal invocation.
pub fn remove_volume_args(volume_name: &str) -> (r: Vec<String>)
    ensures
        r.deep_view() == seq!["volume"@, "rm"@, volume_name@],
{
    let mut v: Vec<String> = Vec::new();
    v.push(String::from_str("volume"));
    v.push(String::from_str("rm"));
    v.push(String::from_str(volume_name));
    proof {
        assert(v.deep_view() =~= seq!["volume"@, "rm"@, volume_name@]);
    }
    v
}

/// The fixed volume-creation invocation.
pub fn create_volume_args(volume_name: &str) -> (r: Vec<String>)
    ensures
        r.deep_view() == seq!["volume"@, "create"@, volume_name@],
{
    let mut v: Vec<String> = Vec::new();
    v.push(String::from_str("volume"));
    v.push(String::from_str("create"));
    v.push(String::from_str(volume_name));
    proof {
        assert(v.deep_view() =~= seq!["volume"@, "create"@, volume_name@]);
    }
    v
}

} // verus!
