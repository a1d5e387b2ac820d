use crate::opaque::spec_alignment;
use vstd::prelude::*;

verus! {

/// The stages in which the engine brings a library up, in order.
#[derive(Clone, Copy, Debug, PartialEq, Eq, Structural)]
pub enum InitLevel {
    Core,
    Servers,
    Scene,
    Editor,
}

/// What the engine hands to the entry point to reach its functions.
#[derive(Clone, Copy, Debug, PartialEq, Eq, Structural)]
pub enum Handed {
    /// A table of function pointers, as older engines pass it.
    LegacyTable,
    /// The function that looks an engine function up by name.
    GetProcAddress,
}

/// What the engine reports about one built-in type, beside what the
/// binding was built with.
#[derive(Clone, Copy, Debug, PartialEq, Eq, Structural)]
pub struct LayoutCheck {
    /// Size that the binding's opaque storage has.
    pub built_size: usize,
    /// Size that the engine reports.
    pub engine_size: usize,
    /// Alignment that the engine reports.
    pub engine_alignment: usize,
}

/// What the entry point has to do before it reports success.
#[derive(Debug, PartialEq, Eq)]
pub struct LoadPlan {
    /// Patch the call trampolines into the host module first.
    pub patch_trampolines: bool,
    /// Wrap the legacy table so that it answers like the lookup function.
    pub normalize_legacy: bool,
    /// The stages for which callbacks go into the descriptor, in order.
    pub levels: Vec<InitLevel>,
}

/// What the engine handed over, told by the two numbers that stand at its
/// head: a legacy table starts with its version, 4 and 0; anything else is
/// the lookup function.
pub fn handed_from_version(major: u32, minor: u32) -> (handed: Handed)
    ensures
        handed == if major == 4 && minor == 0 {
            Handed::LegacyTable
        } else {
            Handed::GetProcAddress
        },
{
    if major == 4 && minor == 0 {
        Handed::LegacyTable
    } else {
        Handed::GetProcAddress
    }
}

/// Whether one built-in type has the layout that the engine reports.
pub open spec fn layout_agrees(check: LayoutCheck, pointer_width: u32) -> bool {
    check.engine_size == check.built_size && check.engine_alignment == spec_alignment(
        pointer_width,
    )
}

/// Every stage, in the order in which the engine goes through them.
pub open spec fn all_levels() -> Seq<InitLevel> {
    seq![InitLevel::Core, InitLevel::Servers, InitLevel::Scene, InitLevel::Editor]
}

/// Position of the first built-in type whose layout differs from what the
/// engine reports, if there is one.
pub fn first_layout_mismatch(checks: &Vec<LayoutCheck>, pointer_width: u32) -> (found: Option<
    usize,
>)
    ensures
        match found {
            Some(i) => {
                &&& i < checks@.len()
                &&& !layout_agrees(checks@[i as int], pointer_width)
                &&& forall|j: int| 0 <= j < i ==> layout_agrees(#[trigger] checks@[j], pointer_width)
            },
            None => forall|j: int|
                0 <= j < checks@.len() ==> layout_agrees(#[trigger] checks@[j], pointer_width),
        },
{
    let expected = crate::opaque::alignment(pointer_width);
    let mut i: usize = 0;
    while i < checks.len()
        invariant
            i <= checks.len(),
            expected == spec_alignment(pointer_width),
            forall|j: int| 0 <= j < i ==> layout_agrees(#[trigger] checks@[j], pointer_width),
        decreases checks.len() - i,
    {
        let check = checks[i];
        if check.engine_size != check.built_size || check.engine_alignment != expected {
            return Some(i);
        }
        i += 1;
    }
    None
}

/// Decides what the entry point does with what the engine handed over.
///
/// The load is refused, before anything else is done, if some built-in
/// type has another layout than the engine reports. Otherwise the
/// trampolines are patched on the web target only, a legacy table is
/// normalized, and callbacks are set for every stage.
pub fn plan_load(
    handed: Handed,
    web_target: bool,
    checks: &Vec<LayoutCheck>,
    pointer_width: u32,
) -> (plan: Option<LoadPlan>)
    ensures
        match plan {
            Some(p) => {
                &&& forall|j: int|
                    0 <= j < checks@.len() ==> layout_agrees(#[trigger] checks@[j], pointer_width)
                &&& p.patch_trampolines == web_target
                &&& p.normalize_legacy == (handed == Handed::LegacyTable)
                &&& p.levels@ == all_levels()
            },
            None => exists|j: int|
                0 <= j < checks@.len() && !layout_agrees(#[trigger] checks@[j], pointer_width),
        },
{
    if first_layout_mismatch(checks, pointer_width).is_some() {
        return None;
    }
    let mut levels: Vec<InitLevel> = Vec::new();
    levels.push(InitLevel::Core);
    levels.push(InitLevel::Servers);
    levels.push(InitLevel::Scene);
    levels.push(InitLevel::Editor);
    assert(levels@ =~= all_levels());
    let normalize_legacy = match handed {
        Handed::LegacyTable => true,
        Handed::GetProcAddress => false,
    };
    Some(LoadPlan { patch_trampolines: web_target, normalize_legacy, levels })
}

} // verus!
