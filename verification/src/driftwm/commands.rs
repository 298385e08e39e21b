//! The commands of `driftwm msg`, as lists of arguments. Coordinates and sizes are whole numbers.

use super::wire::DriftError;
use super::wire::DriftFault;
use crate::backend::Win;
use crate::text;
use vstd::prelude::*;
use vstd::string::*;

verus! {

/// How a coordinate or a size is written.
pub fn fmt_i(v: i64) -> (r: String)
    ensures
        r@ == text::signed_decimal(v as int),
{
    text::signed_text(v)
}

fn about_window(verb: &str, id: &str) -> (r: Vec<String>)
    ensures
        text::texts(r@) == seq![verb@, "--id"@, id@],
{
    let mut args: Vec<String> = Vec::new();
    args.push(verb.to_owned());
    args.push("--id".to_owned());
    args.push(id.to_owned());
    assert(text::texts(args@) =~= seq![verb@, "--id"@, id@]);
    args
}

fn with_numbers(front: Vec<String>, x: i64, y: i64) -> (r: Vec<String>)
    ensures
        text::texts(r@) == text::texts(front@) + seq![
            text::signed_decimal(x as int),
            text::signed_decimal(y as int),
        ],
{
    let mut args = front;
    args.push(fmt_i(x));
    args.push(fmt_i(y));
    assert(text::texts(args@) =~= text::texts(front@) + seq![
        text::signed_decimal(x as int),
        text::signed_decimal(y as int),
    ]);
    args
}

/// Moves the centre of a window.
pub fn move_to(id: &str, x: i64, y: i64) -> (r: Vec<String>)
    ensures
        text::texts(r@) == seq!["move"@, "--id"@, id@] + seq![
            text::signed_decimal(x as int),
            text::signed_decimal(y as int),
        ],
{
    with_numbers(about_window("move", id), x, y)
}

/// Resizes a window about its centre.
pub fn resize_to(id: &str, width: i64, height: i64) -> (r: Vec<String>)
    ensures
        text::texts(r@) == seq!["resize"@, "--id"@, id@] + seq![
            text::signed_decimal(width as int),
            text::signed_decimal(height as int),
        ],
{
    with_numbers(about_window("resize", id), width, height)
}

/// Moves the camera.
pub fn set_camera(x: i64, y: i64) -> (r: Vec<String>)
    ensures
        text::texts(r@) == seq!["camera"@] + seq![
            text::signed_decimal(x as int),
            text::signed_decimal(y as int),
        ],
{
    let mut args: Vec<String> = Vec::new();
    args.push("camera".to_owned());
    assert(text::texts(args@) =~= seq!["camera"@]);
    with_numbers(args, x, y)
}

/// Makes a window transparent or opaque.
pub fn set_opacity(id: &str, value: u32) -> (r: Vec<String>)
    ensures
        text::texts(r@) == seq!["opacity"@, "--id"@, id@].push(text::decimal(value as nat)),
{
    let mut args = about_window("opacity", id);
    let ghost front = args@;
    args.push(text::decimal_text(value as u64));
    assert(text::texts(args@) =~= text::texts(front).push(text::decimal(value as nat)));
    args
}

/// Focuses a window: by its application id, which works with clients that do not follow the id
/// of the window, or by this id where it has no other.
pub fn focus<F>(win: &Win<F>) -> (r: Vec<String>)
    ensures
        text::texts(r@) == if win.app_id@.len() == 0 {
            seq!["focus"@, "--id"@, win.key@]
        } else {
            seq!["focus"@, win.app_id@]
        },
{
    if win.app_id.as_str().is_empty() {
        return about_window("focus", win.key.as_str());
    }
    let mut args: Vec<String> = Vec::new();
    args.push("focus".to_owned());
    args.push(win.app_id.clone());
    assert(text::texts(args@) =~= seq!["focus"@, win.app_id@]);
    args
}

/// Runs an action on the focused window.
pub fn action(name: &str) -> (r: Vec<String>)
    ensures
        text::texts(r@) == seq!["action"@, name@],
{
    let mut args: Vec<String> = Vec::new();
    args.push("action".to_owned());
    args.push(name.to_owned());
    assert(text::texts(args@) =~= seq!["action"@, name@]);
    args
}

/// Closes a window.
pub fn close(id: &str) -> (r: Vec<String>)
    ensures
        text::texts(r@) == seq!["close"@, "--id"@, id@],
{
    about_window("close", id)
}

/// How a window is described: by its id and, where it has a position, by this, written as the two
/// texts say.
pub fn describe<F>(win: &Win<F>, at: Option<(&str, &str)>) -> (r: String)
    ensures
        r@ == match at {
            Some((x, y)) => "id="@ + win.key@ + " @("@ + x@ + ","@ + y@ + ")"@,
            None => win.key@,
        },
{
    match at {
        Some((x, y)) => {
            let mut s = "id=".to_owned();
            s.append(win.key.as_str());
            s.append(" @(");
            s.append(x);
            s.append(",");
            s.append(y);
            s.append(")");
            s
        },
        None => win.key.clone(),
    }
}

/// What came of a command, by whether it succeeded and what it complained about.
pub fn msg(args: &Vec<String>, success: bool, complaint: &str) -> (r: Result<(), DriftError>)
    ensures
        match r {
            Ok(()) => success,
            Err(e) => !success && e@ == (DriftFault::Failed {
                command: text::joined(text::texts(args@), " "@),
                complaint: text::trimmed(complaint@),
            }),
        },
{
    if success {
        Ok(())
    } else {
        Err(
            DriftError::Failed {
                command: text::join(args, " "),
                complaint: text::trim(complaint),
            },
        )
    }
}

} // verus!
