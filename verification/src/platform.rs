//! Platform-specific choices: the hardware decoder backend, and the timer
//! resolution guard that only acts on Windows.

use vstd::prelude::*;

use crate::text::chars_eq_str;
use crate::text::chars_of;
use crate::text::lower_seq;
use crate::text::lower_vec;

verus! {

/// Holds the raised system timer resolution for its lifetime. Raising it is
/// a Windows call; on other systems the guard only records the request.
pub struct WindowsTimerResolution {
    pub enabled: bool,
}

impl WindowsTimerResolution {
    pub fn new(enable: bool) -> (r: WindowsTimerResolution)
        ensures
            r.enabled == enable,
    {
        WindowsTimerResolution { enabled: enable }
    }
}

#[derive(Debug, Clone, Copy, PartialEq, Eq, Structural)]
pub enum HwBackend {
    Cuda,
    Qsv,
    Vaapi,
    D3d11va,
    Videotoolbox,
}

/// The operating system the program was built for, which orders the
/// backends tried for `auto`.
#[derive(Debug, Clone, Copy, PartialEq, Eq, Structural)]
pub enum TargetOs {
    Windows,
    Macos,
    OtherUnix,
}

pub open spec fn ffmpeg_flag(b: HwBackend) -> Seq<char> {
    match b {
        HwBackend::Cuda => "cuda"@,
        HwBackend::Qsv => "qsv"@,
        HwBackend::Vaapi => "vaapi"@,
        HwBackend::D3d11va => "d3d11va"@,
        HwBackend::Videotoolbox => "videotoolbox"@,
    }
}

/// The backend a lower-case name names (`d3d11` is an alias of `d3d11va`).
pub open spec fn backend_named_lower(s: Seq<char>) -> Option<HwBackend> {
    if s == "cuda"@ {
        Some(HwBackend::Cuda)
    } else if s == "qsv"@ {
        Some(HwBackend::Qsv)
    } else if s == "vaapi"@ {
        Some(HwBackend::Vaapi)
    } else if s == "d3d11"@ || s == "d3d11va"@ {
        Some(HwBackend::D3d11va)
    } else if s == "videotoolbox"@ {
        Some(HwBackend::Videotoolbox)
    } else {
        None
    }
}

/// The backend a name names, in any case.
pub open spec fn backend_named(s: Seq<char>) -> Option<HwBackend> {
    backend_named_lower(lower_seq(s))
}

impl HwBackend {
    pub fn as_ffmpeg_flag(self) -> (r: &'static str)
        ensures
            r@ == ffmpeg_flag(self),
    {
        proof {
            reveal_strlit("cuda");
            reveal_strlit("qsv");
            reveal_strlit("vaapi");
            reveal_strlit("d3d11va");
            reveal_strlit("videotoolbox");
        }
        match self {
            HwBackend::Cuda => "cuda",
            HwBackend::Qsv => "qsv",
            HwBackend::Vaapi => "vaapi",
            HwBackend::D3d11va => "d3d11va",
            HwBackend::Videotoolbox => "videotoolbox",
        }
    }

    pub fn from_str_canon(s: &str) -> (r: Option<HwBackend>)
        ensures
            r == backend_named(s@),
    {
        let v = lower_vec(&chars_of(s));
        backend_from_lower(&v)
    }
}

fn backend_from_lower(v: &[char]) -> (r: Option<HwBackend>)
    ensures
        r == backend_named_lower(v@),
{
    if chars_eq_str(v, "cuda") {
        Some(HwBackend::Cuda)
    } else if chars_eq_str(v, "qsv") {
        Some(HwBackend::Qsv)
    } else if chars_eq_str(v, "vaapi") {
        Some(HwBackend::Vaapi)
    } else if chars_eq_str(v, "d3d11") || chars_eq_str(v, "d3d11va") {
        Some(HwBackend::D3d11va)
    } else if chars_eq_str(v, "videotoolbox") {
        Some(HwBackend::Videotoolbox)
    } else {
        None
    }
}

/// The order in which `auto` tries the backends on each system.
pub open spec fn candidates(os: TargetOs) -> Seq<HwBackend> {
    match os {
        TargetOs::Windows => seq![HwBackend::Cuda, HwBackend::D3d11va, HwBackend::Qsv],
        TargetOs::Macos => seq![HwBackend::Videotoolbox],
        TargetOs::OtherUnix => seq![HwBackend::Vaapi, HwBackend::Qsv, HwBackend::Cuda],
    }
}

/// The candidate order for `auto` on a system.
pub fn auto_candidates(os: TargetOs) -> (r: Vec<HwBackend>)
    ensures
        r@ == candidates(os),
{
    let r = match os {
        TargetOs::Windows => vec![HwBackend::Cuda, HwBackend::D3d11va, HwBackend::Qsv],
        TargetOs::Macos => vec![HwBackend::Videotoolbox],
        TargetOs::OtherUnix => vec![HwBackend::Vaapi, HwBackend::Qsv, HwBackend::Cuda],
    };
    assert(r@ =~= candidates(os));
    r
}

/// The first candidate that is available.
pub open spec fn first_available(c: Seq<HwBackend>, avail: Seq<HwBackend>) -> Option<HwBackend>
    decreases c.len(),
{
    if c.len() == 0 {
        None
    } else if avail.contains(c[0]) {
        Some(c[0])
    } else {
        first_available(c.drop_first(), avail)
    }
}

/// The backend to use for a preference: `auto` (or empty) takes the first
/// available backend of the system's order, `none` takes none, a backend
/// name takes that backend when it is available. Names in any case.
pub open spec fn pick(prefer: Seq<char>, avail: Seq<HwBackend>, os: TargetOs) -> Option<HwBackend> {
    let l = lower_seq(prefer);
    if l.len() == 0 || l == "auto"@ {
        first_available(candidates(os), avail)
    } else if l == "none"@ {
        None
    } else {
        match backend_named_lower(l) {
            Some(b) => if avail.contains(b) {
                Some(b)
            } else {
                None
            },
            None => None,
        }
    }
}

fn contains_backend(avail: &[HwBackend], b: HwBackend) -> (r: bool)
    ensures
        r == avail@.contains(b),
{
    let mut i: usize = 0;
    while i < avail.len()
        invariant
            i <= avail.len(),
            forall|k: int| 0 <= k < i ==> avail@[k] != b,
        decreases avail.len() - i,
    {
        if avail[i] == b {
            assert(avail@[i as int] == b);
            return true;
        }
        i = i + 1;
    }
    false
}

/// Picks the hardware backend for a preference (see [`pick`]).
pub fn pick_hw_backend(prefer: &str, available: &[HwBackend], os: TargetOs) -> (r: Option<HwBackend>)
    ensures
        r == pick(prefer@, available@, os),
{
    let l = lower_vec(&chars_of(prefer));
    if l.len() == 0 || chars_eq_str(&l, "auto") {
        assert(pick(prefer@, available@, os) == first_available(candidates(os), available@));
        let c = auto_candidates(os);
        let mut i: usize = 0;
        assert(c@.skip(0) =~= c@);
        while i < c.len()
            invariant
                i <= c.len(),
                first_available(candidates(os), available@) == first_available(c@.skip(i as int), available@),
                pick(prefer@, available@, os) == first_available(candidates(os), available@),
            decreases c.len() - i,
        {
            assert(c@.skip(i as int)[0] == c@[i as int]);
            assert(c@.skip(i as int).drop_first() =~= c@.skip(i + 1));
            if contains_backend(available, c[i]) {
                return Some(c[i]);
            }
            i = i + 1;
        }
        None
    } else if chars_eq_str(&l, "none") {
        None
    } else {
        match backend_from_lower(&l) {
            Some(b) => if contains_backend(available, b) {
                Some(b)
            } else {
                None
            },
            None => None,
        }
    }
}

} // verus!
