//! Login-item registration. The OS registration itself goes through the
//! auto_launch crate; what is verified is the eligibility rule: the calls
//! are only valid when the process runs from a properly located application
//! bundle, the deepest ancestor directory with extension "app", and only
//! when that bundle is named "Pulse.app". Outside such a bundle every
//! operation is a no-op that reports the registration as off.
use crate::text::find_byte_before;
use crate::text::find_last_byte_before;
use crate::text::match_at;
use crate::text::spec_match_at;
use vstd::prelude::*;
use vstd::string::StringSliceAdditionalSpecFns;

verus! {

/// The start of the path component that ends at `p`: right after the last
/// separator before `p`, or the start of the path.
pub open spec fn spec_component_start(s: Seq<u8>, p: int) -> int {
    match find_byte_before(s, 47, p) {
        Some(i) => i + 1,
        None => 0,
    }
}

/// `p` closes a path component with extension "app" and a non-empty stem:
/// the component ends here (at the end of the path or before a separator),
/// its last four bytes are ".app", and at least one byte stands between the
/// component's start and that dot.
pub open spec fn is_bundle_end(s: Seq<u8>, p: int) -> bool {
    &&& 4 < p <= s.len()
    &&& (p == s.len() || s[p] == 47)
    &&& spec_match_at(s, ".app".spec_bytes(), p - 4)
    &&& spec_component_start(s, p) < p - 4
}

/// The largest component end at or below `q` with extension "app".
pub open spec fn find_bundle_end_below(s: Seq<u8>, q: int) -> Option<int>
    decreases q,
{
    if q < 5 {
        None
    } else if is_bundle_end(s, q) {
        Some(q)
    } else {
        find_bundle_end_below(s, q - 1)
    }
}

/// The end of the deepest ancestor of the path that is an "app" bundle.
pub open spec fn spec_bundle_end(s: Seq<u8>) -> Option<int> {
    find_bundle_end_below(s, s.len() as int)
}

/// The executable path sits inside a properly named application bundle: its
/// deepest "app" ancestor's final component is exactly "Pulse.app".
pub open spec fn spec_eligible(s: Seq<u8>) -> bool {
    match spec_bundle_end(s) {
        None => false,
        Some(p) => p - spec_component_start(s, p) == 9 && spec_match_at(
            s,
            "Pulse.app".spec_bytes(),
            p - 9,
        ),
    }
}

/// The ".app" extension marker.
fn dot_app_pattern() -> (r: &'static [u8])
    ensures
        r@ == ".app".spec_bytes(),
{
    let p = ".app".as_bytes();
    proof {
        reveal_strlit(".app");
        broadcast use vstd::string::is_ascii_spec_bytes;

        assert(vstd::string::is_ascii(".app"));
    }
    p
}

/// The bundle name the registration is valid under.
fn pulse_app_pattern() -> (r: &'static [u8])
    ensures
        r@ == "Pulse.app".spec_bytes(),
{
    let p = "Pulse.app".as_bytes();
    proof {
        reveal_strlit("Pulse.app");
        broadcast use vstd::string::is_ascii_spec_bytes;

        assert(vstd::string::is_ascii("Pulse.app"));
    }
    p
}

/// The start of the component that ends at `p`.
fn component_start(s: &[u8], p: usize) -> (r: usize)
    requires
        p <= s@.len(),
    ensures
        r == spec_component_start(s@, p as int),
        r <= p,
{
    match find_last_byte_before(s, 47, p) {
        Some(i) => i + 1,
        None => 0,
    }
}

/// Whether `p` closes an "app"-extension component.
fn bundle_end_at(s: &[u8], p: usize) -> (r: bool)
    requires
        p <= s@.len(),
    ensures
        r == is_bundle_end(s@, p as int),
{
    if p < 5 {
        return false;
    }
    let boundary = p == s.len() || s[p] == 47;
    if !boundary {
        return false;
    }
    let pat = dot_app_pattern();
    if !match_at(s, pat, p - 4) {
        return false;
    }
    let cs = component_start(s, p);
    cs < p - 4
}

/// Locates the deepest "app" bundle ancestor's end in the path bytes.
fn locate_bundle(s: &[u8]) -> (r: Option<usize>)
    ensures
        r.is_some() == spec_bundle_end(s@).is_some(),
        r matches Some(p) ==> spec_bundle_end(s@) == Some(p as int) && is_bundle_end(s@, p as int),
{
    let mut q: usize = s.len();
    while q >= 5
        invariant
            q <= s@.len(),
            find_bundle_end_below(s@, s@.len() as int) == find_bundle_end_below(s@, q as int),
        decreases q,
    {
        if bundle_end_at(s, q) {
            return Some(q);
        }
        q = q - 1;
    }
    None
}

/// Locates the bundle and checks its name: yields the bundle path's byte
/// length exactly when the path is eligible for login-item registration.
/// That length closes a component: it is the end of the path, or an ASCII
/// separator stands there.
fn eligible_bundle_end(s: &[u8]) -> (r: Option<usize>)
    ensures
        r.is_some() == spec_eligible(s@),
        r matches Some(p) ==> p <= s@.len() && (p == s@.len() || s@[p as int] == 47),
{
    match locate_bundle(s) {
        None => None,
        Some(p) => {
            let cs = component_start(s, p);
            if p - cs == 9 {
                let pat = pulse_app_pattern();
                if match_at(s, pat, p - 9) {
                    Some(p)
                } else {
                    None
                }
            } else {
                None
            }
        },
    }
}

/// Relies on auto_launch's `AutoLaunch::new`, which only records the
/// application name and path for the later registration calls and cannot
/// fail, here for the XDG autostart flavour of the current platform. The
/// prefix of the executable path up to `bundle_len` names the bundle; cut at
/// the end of the string or just before an ASCII separator byte, a prefix of
/// valid UTF-8 stays valid UTF-8, so the conversion always succeeds and a
/// handle always results.
#[verifier::external_body]
fn new_auto_launch(app_name: &str, exe_path: &str, bundle_len: usize) -> (r: Option<
    auto_launch::AutoLaunch,
>)
    requires
        bundle_len <= exe_path.spec_bytes().len(),
        bundle_len == exe_path.spec_bytes().len() || exe_path.spec_bytes()[bundle_len as int]
            == 47,
    ensures
        r.is_some(),
{
    let bytes = &exe_path.as_bytes()[..bundle_len];
    match core::str::from_utf8(bytes) {
        Ok(path) => Some(auto_launch::AutoLaunch::new(
            app_name,
            path,
            auto_launch::LinuxLaunchMode::XdgAutostart,
            &[] as &[&str],
        )),
        Err(_) => None,
    }
}

/// Relies on auto_launch's `AutoLaunch::is_enabled`, which consults the OS
/// login-item registration: the answer depends on machine state, so nothing
/// is promised of it. An inspection failure is mapped to `None`.
#[verifier::external_body]
fn auto_launch_is_enabled(auto: &auto_launch::AutoLaunch) -> Option<bool> {
    match auto.is_enabled() {
        Ok(b) => Some(b),
        Err(_) => None,
    }
}

/// Relies on auto_launch's `AutoLaunch::enable`, which writes the OS
/// login-item registration; whether it succeeds depends on machine state.
#[verifier::external_body]
fn auto_launch_enable(auto: &auto_launch::AutoLaunch) -> bool {
    auto.enable().is_ok()
}

/// Relies on auto_launch's `AutoLaunch::disable`, which removes the OS
/// login-item registration; whether it succeeds depends on machine state.
#[verifier::external_body]
fn auto_launch_disable(auto: &auto_launch::AutoLaunch) -> bool {
    auto.disable().is_ok()
}

#[verifier::external_type_specification]
#[verifier::external_body]
pub struct ExAutoLaunch(auto_launch::AutoLaunch);

/// A registration handle for the bundle the executable runs from: one
/// results exactly when the path is eligible. The handle is registered
/// under the name the bundle rule asks for.
pub fn get_auto_launch(exe_path: &str) -> (r: Option<auto_launch::AutoLaunch>)
    ensures
        r.is_some() <==> spec_eligible(exe_path.spec_bytes()),
{
    let bytes = exe_path.as_bytes();
    match eligible_bundle_end(bytes) {
        None => None,
        Some(p) => new_auto_launch("Pulse", exe_path, p),
    }
}

/// What an inspection of the OS registration comes to: enabled only on a
/// positive answer; a failed inspection reads as off.
pub fn enabled_from_query(query: Option<bool>) -> (r: bool)
    ensures
        r == (query == Some(true)),
{
    match query {
        Some(b) => b,
        None => false,
    }
}

/// Whether the app is registered to start at login. Outside a properly
/// located application bundle the registration is reported as off; inside
/// one, the OS's answer decides, with a failed inspection reading as off.
pub fn is_enabled(exe_path: &str) -> (r: bool)
    ensures
        !spec_eligible(exe_path.spec_bytes()) ==> r == false,
{
    match get_auto_launch(exe_path) {
        Some(auto) => enabled_from_query(auto_launch_is_enabled(&auto)),
        None => false,
    }
}

/// What a toggle request came to.
#[derive(Clone, Copy, Debug, PartialEq, Eq, Structural)]
pub enum LoginItemOutcome {
    /// The process is not running from the properly named bundle: nothing
    /// was touched.
    NotInBundle,
    /// The OS registration was updated.
    Updated,
    /// The OS call did not go through; the registration is unchanged.
    Failed,
}

/// What a registration attempt's success flag comes to.
pub fn outcome_of_attempt(ok: bool) -> (r: LoginItemOutcome)
    ensures
        r == if ok {
            LoginItemOutcome::Updated
        } else {
            LoginItemOutcome::Failed
        },
{
    if ok {
        LoginItemOutcome::Updated
    } else {
        LoginItemOutcome::Failed
    }
}

/// Registers or unregisters the app as a login item. Outside a properly
/// located application bundle this performs no OS mutation at all and says
/// so; inside one, it reports whether the registration call went through.
pub fn set_enabled(exe_path: &str, enabled: bool) -> (r: LoginItemOutcome)
    ensures
        (r == LoginItemOutcome::NotInBundle) <==> !spec_eligible(exe_path.spec_bytes()),
{
    let bytes = exe_path.as_bytes();
    match eligible_bundle_end(bytes) {
        None => LoginItemOutcome::NotInBundle,
        Some(p) => match new_auto_launch("Pulse", exe_path, p) {
            None => LoginItemOutcome::Failed,
            Some(auto) => {
                let ok = if enabled {
                    auto_launch_enable(&auto)
                } else {
                    auto_launch_disable(&auto)
                };
                outcome_of_attempt(ok)
            },
        },
    }
}

/// The state a toggle drives the registration towards: the negation of the
/// state it found.
pub fn next_login_state(current: bool) -> (r: bool)
    ensures
        r == !current,
{
    !current
}

/// One click of the "Start at Login" menu action: flips the registration and
/// reports the state the menu checkbox should now show, with the outcome of
/// the attempt.
pub fn toggle_login_item(exe_path: &str) -> (r: (bool, LoginItemOutcome))
    ensures
        (r.1 == LoginItemOutcome::NotInBundle) <==> !spec_eligible(exe_path.spec_bytes()),
        !spec_eligible(exe_path.spec_bytes()) ==> r.0 == true,
{
    let current = is_enabled(exe_path);
    let desired = next_login_state(current);
    let outcome = set_enabled(exe_path, desired);
    (desired, outcome)
}

} // verus!
