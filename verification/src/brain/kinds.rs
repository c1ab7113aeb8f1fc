use vstd::prelude::*;

verus! {

/// Which brain implementation a bot runs.
#[derive(Copy, Clone, Debug, PartialEq, Eq, Structural)]
pub enum BrainKind {
    Main,
    Sentry,
    RunTester,
    Quake3,
    Zb2,
    Xon,
}

/// The tag of each kind, as a spec value.
pub open spec fn spec_brain_tag(kind: BrainKind) -> Seq<char> {
    match kind {
        BrainKind::Main => "main"@,
        BrainKind::Sentry => "sentry"@,
        BrainKind::RunTester => "runtester"@,
        BrainKind::Quake3 => "q3"@,
        BrainKind::Zb2 => "zb2"@,
        BrainKind::Xon => "xon"@,
    }
}

/// Short kebab-case tag for `kind` (logging and bot naming).
pub fn brain_tag(kind: BrainKind) -> (r: &'static str)
    ensures
        r@ == spec_brain_tag(kind),
{
    match kind {
        BrainKind::Main => "main",
        BrainKind::Sentry => "sentry",
        BrainKind::RunTester => "runtester",
        BrainKind::Quake3 => "q3",
        BrainKind::Zb2 => "zb2",
        BrainKind::Xon => "xon",
    }
}

} // verus!
