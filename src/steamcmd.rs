use vstd::prelude::*;
use vstd::string::StringExecFns;

verus! {

/// Where steamcmd is installed by default on Windows.
pub open spec fn windows_default() -> Seq<char> {
    "C:\\steamcmd\\steamcmd.exe"@
}

/// The steamcmd launcher script in its usual place elsewhere.
pub open spec fn script_default() -> Seq<char> {
    "/home/steam/steamcmd/steamcmd.sh"@
}

/// The steamcmd binary in its usual place elsewhere.
pub open spec fn binary_default() -> Seq<char> {
    "/home/steam/steamcmd"@
}

/// Picks the default steamcmd path: the Windows location on Windows; elsewhere the launcher
/// script where it is present, else the binary.
pub fn find_default_steamcmd(on_windows: bool, script_present: bool) -> (r: &'static str)
    ensures
        r@ == (if on_windows {
            windows_default()
        } else if script_present {
            script_default()
        } else {
            binary_default()
        }),
{
    if on_windows {
        "C:\\steamcmd\\steamcmd.exe"
    } else if script_present {
        "/home/steam/steamcmd/steamcmd.sh"
    } else {
        "/home/steam/steamcmd"
    }
}

/// The argument that logs steamcmd in and then runs `args`.
pub open spec fn login_argument_spec(
    username: Seq<char>,
    password: Seq<char>,
    code: Seq<char>,
    args: Seq<char>,
) -> Seq<char> {
    "+login "@ + username + " "@ + password + " "@ + code + " "@ + args
}

/// Builds the single steamcmd argument `+login <username> <password> <code> <args>`.
pub fn login_argument(username: &str, password: &str, code: &str, args: &str) -> (r: String)
    ensures
        r@ == login_argument_spec(username@, password@, code@, args@),
{
    let mut r = String::from_str("+login ");
    r.append(username);
    r.append(" ");
    r.append(password);
    r.append(" ");
    r.append(code);
    r.append(" ");
    r.append(args);
    r
}

} // verus!
